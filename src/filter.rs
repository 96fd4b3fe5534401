use vstd::prelude::*;

use crate::course::{tags_of, Class};
use crate::requirement::{categories, Category, Requirement};

verus! {

/// A condition on the requirement tags of a course.
///
/// Without a set of requirements every course passes. With one, a course
/// passes when it has any of them (`requirements_or`) or all of them.
pub struct Filter {
    pub requirements: Option<Vec<Requirement>>,
    pub requirements_or: bool,
}

/// Whether `tags` holds the category `c`.
pub open spec fn has_tag(tags: Seq<Category>, c: Category) -> bool {
    exists|i: int| 0 <= i < tags.len() && tags[i] == c
}

/// Whether a course with `tags` meets the requirement set `needs`, combined
/// by "any of" (`any`) or "all of".
pub open spec fn meets(needs: Seq<Category>, any: bool, tags: Seq<Category>) -> bool {
    if any {
        exists|j: int| 0 <= j < needs.len() && has_tag(tags, #[trigger] needs[j])
    } else {
        forall|j: int| 0 <= j < needs.len() ==> has_tag(tags, #[trigger] needs[j])
    }
}

impl Filter {
    /// The required categories, if the filter has any.
    pub open spec fn needs(&self) -> Option<Seq<Category>> {
        match self.requirements {
            Some(v) => Some(categories(v@)),
            None => None,
        }
    }

    /// Whether a course with `tags` passes this filter.
    pub open spec fn admits(&self, tags: Seq<Category>) -> bool {
        match self.needs() {
            None => true,
            Some(needs) => meets(needs, self.requirements_or, tags),
        }
    }

    /// Whether `course`'s requirement tags satisfy this filter.
    pub fn filter_requirements(&self, course: &Class) -> (r: bool)
        ensures
            r == self.admits(tags_of(*course)),
    {
        match &self.requirements {
            None => true,
            Some(needs) => {
                if self.requirements_or {
                    let mut j: usize = 0;
                    while j < needs.len()
                        invariant
                            j <= needs.len(),
                            self.needs() == Some(categories(needs@)),
                            self.requirements_or,
                            forall|k: int|
                                0 <= k < j ==> !has_tag(tags_of(*course), (#[trigger] needs@[k])@),
                        decreases needs.len() - j,
                    {
                        if contains_tag(&course.requirements, &needs[j]) {
                            assert(categories(needs@)[j as int] == needs@[j as int]@);
                            assert(has_tag(tags_of(*course), categories(needs@)[j as int]));
                            return true;
                        }
                        j = j + 1;
                    }
                    false
                } else {
                    let mut j: usize = 0;
                    while j < needs.len()
                        invariant
                            j <= needs.len(),
                            self.needs() == Some(categories(needs@)),
                            !self.requirements_or,
                            forall|k: int|
                                0 <= k < j ==> has_tag(tags_of(*course), (#[trigger] needs@[k])@),
                        decreases needs.len() - j,
                    {
                        if !contains_tag(&course.requirements, &needs[j]) {
                            assert(categories(needs@)[j as int] == needs@[j as int]@);
                            assert(!has_tag(tags_of(*course), categories(needs@)[j as int]));
                            return false;
                        }
                        j = j + 1;
                    }
                    true
                }
            },
        }
    }

    /// Whether `course` passes every condition of this filter; the requirement
    /// tags are the only condition.
    pub fn filter(&self, course: &Class) -> (r: bool)
        ensures
            r == self.admits(tags_of(*course)),
    {
        self.filter_requirements(course)
    }
}

/// Whether `tags` holds a requirement equal to `need`.
fn contains_tag(tags: &Vec<Requirement>, need: &Requirement) -> (r: bool)
    ensures
        r == has_tag(categories(tags@), need@),
{
    let mut i: usize = 0;
    while i < tags.len()
        invariant
            i <= tags.len(),
            forall|k: int| 0 <= k < i ==> tags@[k]@ != need@,
        decreases tags.len() - i,
    {
        if tags[i].eq(need) {
            assert(categories(tags@)[i as int] == need@);
            return true;
        }
        i = i + 1;
    }
    false
}

/// Without a set of requirements a filter lets every course through.
pub proof fn lemma_no_requirements_admits_all(f: Filter, tags: Seq<Category>)
    requires
        f.requirements is None,
    ensures
        f.admits(tags),
{
}

/// "All of" a set of requirements: a course passes exactly when every required
/// category is among its tags. "Any of": exactly when one required category
/// is among them.
pub proof fn lemma_combinators_as_sets(needs: Seq<Category>, tags: Seq<Category>)
    ensures
        meets(needs, false, tags) <==> needs.to_set().subset_of(tags.to_set()),
        meets(needs, true, tags) <==> !needs.to_set().intersect(tags.to_set()).is_empty(),
{
    assert(forall|c: Category| tags.to_set().contains(c) <==> has_tag(tags, c));
    assert(forall|c: Category| needs.to_set().contains(c) <==> has_tag(needs, c));
    if meets(needs, true, tags) {
        let j = choose|j: int| 0 <= j < needs.len() && has_tag(tags, #[trigger] needs[j]);
        assert(needs.to_set().intersect(tags.to_set()).contains(needs[j]));
    }
    if !needs.to_set().intersect(tags.to_set()).is_empty() {
        let c = needs.to_set().intersect(tags.to_set()).choose();
        assert(needs.to_set().intersect(tags.to_set()).contains(c));
        let j = choose|j: int| 0 <= j < needs.len() && needs[j] == c;
        assert(has_tag(tags, needs[j]));
    }
}

/// With a single required category, "all of" and "any of" agree.
pub proof fn lemma_single_requirement_and_or_agree(need: Category, tags: Seq<Category>)
    ensures
        meets(seq![need], false, tags) == meets(seq![need], true, tags),
{
    let s = seq![need];
    assert(s[0] == need);
    if meets(s, true, tags) {
        let j = choose|j: int| 0 <= j < s.len() && has_tag(tags, #[trigger] s[j]);
        assert(j == 0);
    }
}

} // verus!
